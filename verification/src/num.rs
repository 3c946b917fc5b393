//! The exact number types: the integer ring `ZZ` over a fixed-width
//! unsigned magnitude, the exact rational field `QQ` built from pairs of
//! such integers, a small rational vector as a worked module, and the
//! single-variable monomials and polynomials over the rationals.
//!
//! Arithmetic on the underlying magnitudes wraps silently; rationals are not
//! reduced to lowest terms, so magnitudes grow across long chains of
//! operations. Both are documented limitations, not guarded errors.
use vstd::prelude::*;
use vstd::std_specs::cmp::PartialEqSpec;
use vstd::arithmetic::div_mod::lemma_small_mod;
use crate::{BasicObject, BasicObjectCopy};
use crate::algebra::{
    AddGroup, Algebra, AlgebraError, Field, Module, Monomial, MonomialFormat, Polynomial, Ring,
    ScaMul, Var, lookup_spec, lookup_var,
};
use crate::tools::eff_len;

verus! {

/// One more than the largest `u128`: the modulus of the wrapping arithmetic.
pub open spec fn wrap_modulus() -> nat {
    (u128::MAX as nat) + 1
}

proof fn lemma_wrap_mul_one(x: u128)
    ensures
        x.wrapping_mul(1) == x,
{
    assert(x as nat * 1nat == x as nat);
    lemma_small_mod(x as nat, wrap_modulus());
}

proof fn lemma_wrap_mul_zero(x: u128)
    ensures
        x.wrapping_mul(0) == 0,
        (0u128).wrapping_mul(x) == 0,
{
    assert(x as nat * 0nat == 0nat);
    lemma_small_mod(0nat, wrap_modulus());
}

proof fn lemma_wrap_mul_comm(x: u128, y: u128)
    ensures
        x.wrapping_mul(y) == y.wrapping_mul(x),
{
    assert(x as nat * y as nat == y as nat * x as nat);
}

/// The integer ring: a fixed-width unsigned magnitude whose addition and
/// multiplication wrap. Division is not closed here: it yields a rational.
#[derive(Debug, Clone, Copy, Eq)]
pub struct ZZ {
    pub value: u128,
}

impl PartialEq for ZZ {
    fn eq(&self, other: &Self) -> (r: bool) {
        self.value == other.value
    }
}

impl vstd::std_specs::cmp::PartialEqSpecImpl for ZZ {
    open spec fn obeys_eq_spec() -> bool {
        true
    }

    closed spec fn eq_spec(&self, other: &Self) -> bool {
        self.value == other.value
    }
}

impl BasicObject for ZZ {

}

impl BasicObjectCopy for ZZ {

}

/// Repeated wrapping multiplication of integers, starting from one.
pub open spec fn zz_pow(base: ZZ, n: nat) -> ZZ
    decreases n,
{
    if n == 0 {
        ZZ { value: 1 }
    } else {
        ZZ { value: zz_pow(base, (n - 1) as nat).value.wrapping_mul(base.value) }
    }
}

impl AddGroup for ZZ {
    open spec fn zero_spec() -> Self {
        ZZ { value: 0 }
    }

    open spec fn add_spec(self, other: Self) -> Self {
        ZZ { value: self.value.wrapping_add(other.value) }
    }

    fn zero() -> (r: Self) {
        ZZ { value: 0 }
    }

    fn is_zero(&self) -> (r: bool) {
        *self == Self::zero()
    }

    fn add(self, other: Self) -> (r: Self) {
        ZZ { value: self.value.wrapping_add(other.value) }
    }
}

impl Ring for ZZ {
    open spec fn one_spec() -> Self {
        ZZ { value: 1 }
    }

    open spec fn mul_spec(self, other: Self) -> Self {
        ZZ { value: self.value.wrapping_mul(other.value) }
    }

    open spec fn pow_of(self, n: nat) -> Self {
        zz_pow(self, n)
    }

    proof fn pow_of_unfold(self, n: nat) {
        if n > 0 {
            let p = zz_pow(self, (n - 1) as nat);
            assert(zz_pow(self, n).value == p.value.wrapping_mul(self.value));
            assert(p.mul_spec(self).value == p.value.wrapping_mul(self.value));
            assert(zz_pow(self, n) == p.mul_spec(self));
        }
    }

    fn one() -> (r: Self) {
        ZZ { value: 1 }
    }

    fn mul(self, other: Self) -> (r: Self) {
        let value = self.value.wrapping_mul(other.value);
        proof {
            assert(value == self.mul_spec(other).value);
            assert(ZZ { value } == self.mul_spec(other));
        }
        ZZ { value }
    }
}

impl ZZ {
    /// Division of two integers yields an exact rational, never another
    /// integer; a divisor of zero magnitude is rejected.
    pub fn div(self, other: ZZ) -> (r: Result<QQ, AlgebraError>)
        ensures
            other.value == 0 ==> r == Err::<QQ, AlgebraError>(AlgebraError::ZeroDivisor),
            other.value != 0 ==> (r matches Ok(q) && q.num() == self.value && q.den()
                == other.value),
    {
        if other.value == 0 {
            Err(AlgebraError::ZeroDivisor)
        } else {
            Ok(QQ { inner: (self.value, other.value) })
        }
    }
}

/// The exact rational field: a numerator/denominator pair of wrapping
/// unsigned magnitudes, not reduced to lowest terms.
#[derive(Debug, Clone, Copy, Eq)]
pub struct QQ {
    inner: (u128, u128),
}

impl QQ {
    /// The numerator.
    pub closed spec fn num(self) -> u128 {
        self.inner.0
    }

    /// The denominator.
    pub closed spec fn den(self) -> u128 {
        self.inner.1
    }

    /// The numerator, for callers outside the library.
    pub fn numer(&self) -> (n: u128)
        ensures
            n == self.num(),
    {
        self.inner.0
    }

    /// The denominator, for callers outside the library.
    pub fn denom(&self) -> (d: u128)
        ensures
            d == self.den(),
    {
        self.inner.1
    }

    /// Builds `a / b`; a zero denominator is rejected.
    pub fn from_pair(a: u128, b: u128) -> (r: Result<QQ, AlgebraError>)
        ensures
            b == 0 ==> r == Err::<QQ, AlgebraError>(AlgebraError::ZeroDivisor),
            b != 0 ==> (r matches Ok(q) && q.num() == a && q.den() == b),
    {
        if b == 0 {
            Err(AlgebraError::ZeroDivisor)
        } else {
            Ok(QQ { inner: (a, b) })
        }
    }
}

/// Rational equality as a plain predicate: the wrapping cross
/// multiplication rule.
pub open spec fn qq_eq(a: QQ, b: QQ) -> bool {
    a.num().wrapping_mul(b.den()) == a.den().wrapping_mul(b.num())
}

/// The same equality test as a plain function.
fn qq_eq_exec(a: &QQ, b: &QQ) -> (r: bool)
    ensures
        r == qq_eq(*a, *b),
{
    a.inner.0.wrapping_mul(b.inner.1) == a.inner.1.wrapping_mul(b.inner.0)
}

/// Whether a rational represents zero: its numerator is zero, whatever its
/// denominator.
pub open spec fn qq_is_zero(q: QQ) -> bool {
    q.num() == 0
}

/// Equality is the rule the quotient form induces: `a/b == c/d` exactly
/// when `a * d` and `b * c` agree under the wrapping multiplication. This
/// is cross-multiplication, so every rational with zero numerator — `0/1`,
/// `0/2`, and so on — compares equal to zero.
impl PartialEq for QQ {
    fn eq(&self, other: &Self) -> (r: bool) {
        self.inner.0.wrapping_mul(other.inner.1) == self.inner.1.wrapping_mul(other.inner.0)
    }
}

impl vstd::std_specs::cmp::PartialEqSpecImpl for QQ {
    open spec fn obeys_eq_spec() -> bool {
        true
    }

    closed spec fn eq_spec(&self, other: &Self) -> bool {
        self.inner.0.wrapping_mul(other.inner.1) == self.inner.1.wrapping_mul(other.inner.0)
    }
}

/// The wrapping cross-multiplication rule, characterized for callers:
/// `a/b` equals `c/d` exactly when `a * d` and `b * c` agree modulo the
/// magnitude width.
pub proof fn lemma_qq_eq_characterization(a: QQ, b: QQ)
    ensures
        a.eq_spec(&b) == (a.num().wrapping_mul(b.den()) == a.den().wrapping_mul(b.num())),
{
}

/// Equality with the distinguished zero is exactly a zero numerator.
pub proof fn lemma_qq_eq_zero(q: QQ)
    ensures
        q.eq_spec(&QQ::zero_spec()) == qq_is_zero(q),
{
    lemma_wrap_mul_one(q.num());
    lemma_wrap_mul_zero(q.den());
}

impl BasicObject for QQ {

}

impl BasicObjectCopy for QQ {

}

/// Repeated wrapping multiplication of rationals, starting from one.
pub closed spec fn qq_pow(base: QQ, n: nat) -> QQ
    decreases n,
{
    if n == 0 {
        QQ { inner: (1, 1) }
    } else {
        QQ {
            inner: (
                qq_pow(base, (n - 1) as nat).inner.0.wrapping_mul(base.inner.0),
                qq_pow(base, (n - 1) as nat).inner.1.wrapping_mul(base.inner.1),
            ),
        }
    }
}

impl AddGroup for QQ {
    closed spec fn zero_spec() -> Self {
        QQ { inner: (0, 1) }
    }

    closed spec fn add_spec(self, other: Self) -> Self {
        QQ {
            inner: (
                self.inner.0.wrapping_mul(other.inner.1).wrapping_add(
                    other.inner.0.wrapping_mul(self.inner.1),
                ),
                self.inner.1.wrapping_mul(other.inner.1),
            ),
        }
    }

    fn zero() -> (r: Self) {
        QQ { inner: (0, 1) }
    }

    fn is_zero(&self) -> (r: bool) {
        *self == Self::zero()
    }

    fn add(self, other: Self) -> (r: Self) {
        QQ {
            inner: (
                self.inner.0.wrapping_mul(other.inner.1).wrapping_add(
                    other.inner.0.wrapping_mul(self.inner.1),
                ),
                self.inner.1.wrapping_mul(other.inner.1),
            ),
        }
    }
}

impl Ring for QQ {
    closed spec fn one_spec() -> Self {
        QQ { inner: (1, 1) }
    }

    closed spec fn mul_spec(self, other: Self) -> Self {
        QQ {
            inner: (
                self.inner.0.wrapping_mul(other.inner.0),
                self.inner.1.wrapping_mul(other.inner.1),
            ),
        }
    }

    open spec fn pow_of(self, n: nat) -> Self {
        qq_pow(self, n)
    }

    proof fn pow_of_unfold(self, n: nat) {
        if n > 0 {
            let p = qq_pow(self, (n - 1) as nat);
            assert(qq_pow(self, n).inner == (
                p.inner.0.wrapping_mul(self.inner.0),
                p.inner.1.wrapping_mul(self.inner.1),
            ));
            assert(p.mul_spec(self).inner == (
                p.inner.0.wrapping_mul(self.inner.0),
                p.inner.1.wrapping_mul(self.inner.1),
            ));
            assert(qq_pow(self, n) == p.mul_spec(self));
        }
    }

    fn one() -> (r: Self) {
        QQ { inner: (1, 1) }
    }

    fn mul(self, other: Self) -> (r: Self) {
        let inner = (
            self.inner.0.wrapping_mul(other.inner.0),
            self.inner.1.wrapping_mul(other.inner.1),
        );
        proof {
            assert(inner == self.mul_spec(other).inner);
            assert(QQ { inner } == self.mul_spec(other));
        }
        QQ { inner }
    }
}

impl Field for QQ {
    closed spec fn div_spec(self, other: Self) -> Self {
        QQ {
            inner: (
                self.inner.0.wrapping_mul(other.inner.1),
                self.inner.1.wrapping_mul(other.inner.0),
            ),
        }
    }

    fn div(self, other: Self) -> (r: Self) {
        QQ {
            inner: (
                self.inner.0.wrapping_mul(other.inner.1),
                self.inner.1.wrapping_mul(other.inner.0),
            ),
        }
    }
}


impl ScaMul<QQ> for QQ {
    open spec fn sca_mul_spec(self, sca: QQ) -> Self {
        sca.mul_spec(self)
    }

    fn sca_mul(self, sca: QQ) -> (r: Self) {
        sca.mul(self)
    }
}

impl Module<QQ> for QQ {

}

impl Algebra<QQ> for QQ {

}

/// The numerator and denominator that the rational constructors and
/// operations produce, characterized for callers.
pub proof fn lemma_qq_parts(a: QQ, b: QQ)
    ensures
        QQ::zero_spec().num() == 0 && QQ::zero_spec().den() == 1,
        QQ::one_spec().num() == 1 && QQ::one_spec().den() == 1,
        a.add_spec(b).num() == a.num().wrapping_mul(b.den()).wrapping_add(
            b.num().wrapping_mul(a.den()),
        ),
        a.add_spec(b).den() == a.den().wrapping_mul(b.den()),
        a.mul_spec(b).num() == a.num().wrapping_mul(b.num()),
        a.mul_spec(b).den() == a.den().wrapping_mul(b.den()),
        a.div_spec(b).num() == a.num().wrapping_mul(b.den()),
        a.div_spec(b).den() == a.den().wrapping_mul(b.num()),
{
}

/// Law: adding the rational zero, or multiplying by the rational one,
/// returns the operand unchanged — the very same pair — and therefore a
/// rational equal to it.
pub proof fn lemma_qq_identity(q: QQ)
    ensures
        q.add_spec(QQ::zero_spec()) == q,
        q.mul_spec(QQ::one_spec()) == q,
        q.add_spec(QQ::zero_spec()).eq_spec(&q),
        q.mul_spec(QQ::one_spec()).eq_spec(&q),
{
    lemma_wrap_mul_one(q.num());
    lemma_wrap_mul_one(q.den());
    lemma_wrap_mul_zero(q.den());
    assert(q.num().wrapping_add(0) == q.num());
    lemma_wrap_mul_comm(q.num(), q.den());
}

/// Law: any two rationals with zero numerator compare equal, whatever their
/// denominators; in particular `0/1 == 0/2`.
pub proof fn lemma_qq_zeros_equal(a: QQ, b: QQ)
    requires
        qq_is_zero(a),
        qq_is_zero(b),
    ensures
        a.eq_spec(&b),
{
    lemma_wrap_mul_zero(a.den());
    lemma_wrap_mul_zero(b.den());
}

/// A two-component rational vector: the worked example of a module over the
/// rational field, scaled componentwise.
#[derive(Debug, Clone, Copy, Eq)]
pub struct V {
    pub inner: (QQ, QQ),
}

impl PartialEq for V {
    fn eq(&self, other: &Self) -> (r: bool) {
        qq_eq_exec(&self.inner.0, &other.inner.0) && qq_eq_exec(&self.inner.1, &other.inner.1)
    }
}

impl vstd::std_specs::cmp::PartialEqSpecImpl for V {
    open spec fn obeys_eq_spec() -> bool {
        true
    }

    open spec fn eq_spec(&self, other: &Self) -> bool {
        qq_eq(self.inner.0, other.inner.0) && qq_eq(self.inner.1, other.inner.1)
    }
}

impl BasicObject for V {

}

impl BasicObjectCopy for V {

}

impl ScaMul<QQ> for V {
    open spec fn sca_mul_spec(self, sca: QQ) -> Self {
        V { inner: (sca.mul_spec(self.inner.0), sca.mul_spec(self.inner.1)) }
    }

    fn sca_mul(self, sca: QQ) -> (r: Self) {
        V { inner: (sca.mul(self.inner.0), sca.mul(self.inner.1)) }
    }
}

impl AddGroup for V {
    open spec fn zero_spec() -> Self {
        V { inner: (QQ::zero_spec(), QQ::zero_spec()) }
    }

    open spec fn add_spec(self, other: Self) -> Self {
        V { inner: (self.inner.0.add_spec(other.inner.0), self.inner.1.add_spec(other.inner.1)) }
    }

    fn zero() -> (r: Self) {
        V { inner: (QQ::zero(), QQ::zero()) }
    }

    fn is_zero(&self) -> (r: bool) {
        *self == Self::zero()
    }

    fn add(self, other: Self) -> (r: Self) {
        V { inner: (self.inner.0.add(other.inner.0), self.inner.1.add(other.inner.1)) }
    }
}

impl Module<QQ> for V {

}

/// A monomial over the rationals: `coef * var^degree`.
#[derive(Debug, Clone, Copy, Eq)]
pub struct QQMonomial {
    pub degree: usize,
    pub coef: QQ,
    pub var: Var,
}

/// Monomials agree when their degrees, coefficients (as rationals) and
/// variable handles agree.
impl PartialEq for QQMonomial {
    fn eq(&self, other: &Self) -> (r: bool) {
        self.degree == other.degree && self.coef == other.coef && self.var == other.var
    }
}

impl vstd::std_specs::cmp::PartialEqSpecImpl for QQMonomial {
    open spec fn obeys_eq_spec() -> bool {
        true
    }

    open spec fn eq_spec(&self, other: &Self) -> bool {
        self.degree == other.degree && qq_eq(self.coef, other.coef) && self.var == other.var
    }
}

impl BasicObject for QQMonomial {

}

impl BasicObjectCopy for QQMonomial {

}

impl QQMonomial {
    /// The zero monomial in the given variable: degree zero, coefficient
    /// zero.
    pub fn new(var: Var) -> (r: QQMonomial)
        ensures
            r.degree == 0,
            r.coef == QQ::zero_spec(),
            r.var == var,
    {
        QQMonomial { degree: 0, coef: QQ::zero(), var }
    }

    /// A monomial assembled from its degree, coefficient and variable.
    pub fn from_parts(degree: usize, coef: QQ, var: Var) -> (r: QQMonomial)
        ensures
            r == (QQMonomial { degree, coef, var }),
    {
        QQMonomial { degree, coef, var }
    }
}

/// The coefficient sequence a monomial denotes: `degree` zeros, then the
/// coefficient.
pub open spec fn mono_coeffs(degree: nat, coef: QQ) -> Seq<QQ> {
    Seq::new(degree, |i: int| QQ::zero_spec()).push(coef)
}

impl Monomial<QQ, QQ> for QQMonomial {
    type Poly = QQPolynomial;

    fn vars(&self) -> (r: Vec<Var>)
        ensures
            r@ == seq![self.var],
    {
        let mut out: Vec<Var> = Vec::new();
        out.push(self.var);
        proof {
            assert(out@ =~= seq![self.var]);
        }
        out
    }

    fn coef(&self) -> (r: QQ)
        ensures
            r == self.coef,
    {
        self.coef
    }

    fn eval(&self, at: &Vec<(Var, QQ)>) -> (r: Result<QQ, AlgebraError>)
        ensures
            lookup_spec(at@, self.var) matches Some(x) ==> r == Ok::<QQ, AlgebraError>(
                self.coef.mul_spec(qq_pow(x, self.degree as nat)),
            ),
            lookup_spec(at@, self.var) is None ==> r == Err::<QQ, AlgebraError>(
                AlgebraError::VariableNotFound,
            ),
    {
        match lookup_var(at, self.var) {
            Some(value) => Ok(self.coef.mul(value.pow(self.degree))),
            None => Err(AlgebraError::VariableNotFound),
        }
    }

    fn into_format(self) -> (r: MonomialFormat)
        ensures
            r@ == seq![(self.var, self.degree)],
    {
        let mut entries: Vec<(Var, usize)> = Vec::new();
        entries.push((self.var, self.degree));
        proof {
            assert(entries@ =~= seq![(self.var, self.degree)]);
        }
        MonomialFormat::from(entries)
    }

    /// Builds the coefficient list of `degree` zeros followed by the
    /// coefficient and canonicalizes it: a zero coefficient collapses to the
    /// zero polynomial.
    fn into_polynomial(self) -> (r: QQPolynomial)
        ensures
            r@.1 == self.var,
            !qq_is_zero(self.coef) ==> r@.0 == mono_coeffs(self.degree as nat, self.coef),
            qq_is_zero(self.coef) ==> r@.0 == Seq::<QQ>::empty(),
    {
        let mut v: Vec<QQ> = Vec::new();
        let mut i: usize = 0;
        while i < self.degree
            invariant
                i <= self.degree,
                v@ =~= Seq::new(i as nat, |j: int| QQ::zero_spec()),
            decreases self.degree - i,
        {
            v.push(QQ::zero());
            proof {
                assert(v@ =~= Seq::new((i + 1) as nat, |j: int| QQ::zero_spec()));
            }
            i += 1;
        }
        v.push(self.coef);
        proof {
            assert(v@ == mono_coeffs(self.degree as nat, self.coef));
            lemma_mono_coeffs_eff_len(self.degree as nat, self.coef);
        }
        QQPolynomial::from_vec(self.var, v)
    }
}

/// The effective length of a monomial's coefficient list: full when the
/// coefficient is nonzero, zero when it is zero.
proof fn lemma_mono_coeffs_eff_len(degree: nat, coef: QQ)
    ensures
        !qq_is_zero(coef) ==> eff_len(mono_coeffs(degree, coef), QQ::zero_spec()) == degree + 1,
        qq_is_zero(coef) ==> eff_len(mono_coeffs(degree, coef), QQ::zero_spec()) == 0,
{
    let s = mono_coeffs(degree, coef);
    let zeros = Seq::new(degree, |i: int| QQ::zero_spec());
    assert(s.last() == coef);
    lemma_qq_eq_zero(coef);
    if qq_is_zero(coef) {
        assert(s.drop_last() =~= zeros);
        assert(forall|i: int| 0 <= i < zeros.len() ==> (#[trigger] zeros[i]).eq_spec(
            &QQ::zero_spec())) by {
            assert(forall|i: int| 0 <= i < zeros.len() ==> zeros[i] == QQ::zero_spec());
            lemma_qq_eq_zero(QQ::zero_spec());
        }
        crate::tools::lemma_eff_len_zero(zeros, QQ::zero_spec());
    }
}

/// How many coefficients are nonzero.
pub open spec fn count_nonzero(s: Seq<QQ>) -> nat
    decreases s.len(),
{
    if s.len() == 0 {
        0
    } else {
        count_nonzero(s.drop_last()) + if qq_is_zero(s.last()) {
            0nat
        } else {
            1nat
        }
    }
}

/// The index of the first nonzero coefficient.
pub open spec fn first_nonzero(s: Seq<QQ>) -> int
    decreases s.len(),
{
    if s.len() == 0 {
        0
    } else if !qq_is_zero(s[0]) {
        0
    } else {
        1 + first_nonzero(s.drop_first())
    }
}

/// The value of the polynomial with coefficient list `s` at `x`: the sum of
/// `s[i] * x^i`, accumulated left to right starting from zero.
pub open spec fn qq_poly_eval(s: Seq<QQ>, x: QQ) -> QQ
    decreases s.len(),
{
    if s.len() == 0 {
        QQ::zero_spec()
    } else {
        qq_poly_eval(s.drop_last(), x).add_spec(
            s.last().mul_spec(qq_pow(x, (s.len() - 1) as nat)),
        )
    }
}

/// A single-variable polynomial over the rationals: coefficients indexed by
/// degree, kept canonical — the list never ends in a coefficient equal to
/// zero. Every constructor canonicalizes, which makes a malformed
/// polynomial structurally unreachable rather than a runtime check.
#[derive(Debug, Clone, Eq)]
pub struct QQPolynomial {
    inner: Vec<QQ>,
    var: Var,
}

impl View for QQPolynomial {
    type V = (Seq<QQ>, Var);

    closed spec fn view(&self) -> (Seq<QQ>, Var) {
        (self.inner@, self.var)
    }
}

impl BasicObject for QQPolynomial {

}

/// Equality of canonical polynomials: the coefficient lists have the same
/// length and agree, coefficient by coefficient, under rational equality.
/// The variable handles are not compared, as in the trait's reading of a
/// polynomial as its coefficient list.
impl PartialEq for QQPolynomial {
    fn eq(&self, other: &Self) -> (r: bool) {
        if self.inner.len() != other.inner.len() {
            return false;
        }
        let mut i: usize = 0;
        while i < self.inner.len()
            invariant
                i <= self@.0.len(),
                self@.0.len() == other@.0.len(),
                forall|j: int| 0 <= j < i ==> (#[trigger] self@.0[j]).eq_spec(&other@.0[j]),
            decreases self@.0.len() - i,
        {
            if !(self.inner[i] == other.inner[i]) {
                return false;
            }
            i += 1;
        }
        true
    }
}

impl vstd::std_specs::cmp::PartialEqSpecImpl for QQPolynomial {
    open spec fn obeys_eq_spec() -> bool {
        true
    }

    open spec fn eq_spec(&self, other: &Self) -> bool {
        self@.0.len() == other@.0.len() && forall|i: int|
            0 <= i < self@.0.len() ==> qq_eq(#[trigger] self@.0[i], other@.0[i])
    }
}

impl QQPolynomial {
    /// Builds a polynomial from rational coefficients, stripping the
    /// trailing coefficients equal to zero: the single point where the
    /// canonical form is established, and idempotent.
    pub fn from_vec(var: Var, v: Vec<QQ>) -> (r: QQPolynomial)
        ensures
            r@.1 == var,
            r@.0 == v@.take(eff_len(v@, QQ::zero_spec()) as int),
    {
        let ghost orig = v@;
        let mut v = v;
        proof {
            assert(orig.take(orig.len() as int) =~= orig);
        }
        while v.len() > 0
            invariant_except_break
                v@.len() <= orig.len(),
                v@ == orig.take(v@.len() as int),
                eff_len(orig, QQ::zero_spec()) == eff_len(v@, QQ::zero_spec()),
            ensures
                v@.len() <= orig.len(),
                v@ == orig.take(v@.len() as int),
                v@.len() == eff_len(orig, QQ::zero_spec()),
            decreases v@.len(),
        {
            let l = v.len();
            if v[l - 1].is_zero() {
                proof {
                    lemma_qq_eq_zero(v@[l - 1]);
                    assert(v@.last().eq_spec(&QQ::zero_spec()));
                    assert(v@.drop_last() =~= orig.take(l - 1));
                }
                v.pop();
            } else {
                proof {
                    lemma_qq_eq_zero(v@[l - 1]);
                    assert(!v@.last().eq_spec(&QQ::zero_spec()));
                    assert(eff_len(v@, QQ::zero_spec()) == v@.len());
                }
                break ;
            }
        }
        QQPolynomial { inner: v, var }
    }

    /// Builds a polynomial from integer coefficients, stripping trailing
    /// zeros and reading each remaining integer `i` as the rational `i / 1`.
    pub fn from_vec_int(var: Var, v: Vec<u128>) -> (r: QQPolynomial)
        ensures
            r@.1 == var,
            r@.0 == v@.take(eff_len(v@, 0u128) as int).map_values(|x: u128| qq_int(x)),
    {
        let ghost orig = v@;
        let mut v = v;
        proof {
            assert(orig.take(orig.len() as int) =~= orig);
        }
        while v.len() > 0
            invariant_except_break
                v@.len() <= orig.len(),
                v@ == orig.take(v@.len() as int),
                eff_len(orig, 0u128) == eff_len(v@, 0u128),
            ensures
                v@.len() <= orig.len(),
                v@ == orig.take(v@.len() as int),
                v@.len() == eff_len(orig, 0u128),
            decreases v@.len(),
        {
            let l = v.len();
            if v[l - 1] == 0 {
                proof {
                    assert(v@.last().eq_spec(&0u128));
                    assert(v@.drop_last() =~= orig.take(l - 1));
                }
                v.pop();
            } else {
                proof {
                    assert(!v@.last().eq_spec(&0u128));
                    assert(eff_len(v@, 0u128) == v@.len());
                }
                break ;
            }
        }
        let mut out: Vec<QQ> = Vec::new();
        let mut i: usize = 0;
        while i < v.len()
            invariant
                i <= v@.len(),
                out@.len() == i,
                forall|j: int| 0 <= j < i ==> #[trigger] out@[j] == qq_int(v@[j]),
            decreases v@.len() - i,
        {
            out.push(QQ { inner: (v[i], 1) });
            i += 1;
        }
        proof {
            assert(out@ =~= v@.map_values(|x: u128| qq_int(x)));
        }
        QQPolynomial { inner: out, var }
    }

    /// The index of the first nonzero coefficient, scanning from degree
    /// zero, or nothing when every coefficient is zero.
    fn first_nonzero_index(&self) -> (r: Option<usize>)
        ensures
            r matches Some(n) ==> n < self@.0.len() && n == first_nonzero(self@.0) && !qq_is_zero(
                self@.0[n as int],
            ),
            r is None ==> count_nonzero(self@.0) == 0,
    {
        let mut i: usize = 0;
        proof {
            assert(self@.0.skip(0) =~= self@.0);
        }
        while i < self.inner.len()
            invariant
                i <= self@.0.len(),
                forall|j: int| 0 <= j < i ==> qq_is_zero(#[trigger] self@.0[j]),
                first_nonzero(self@.0) == i + first_nonzero(self@.0.skip(i as int)),
            decreases self@.0.len() - i,
        {
            proof {
                assert(self@.0.skip(i as int)[0] == self@.0[i as int]);
            }
            if !self.inner[i].is_zero() {
                proof {
                    lemma_qq_eq_zero(self@.0[i as int]);
                }
                return Some(i);
            }
            proof {
                lemma_qq_eq_zero(self@.0[i as int]);
                assert(self@.0.skip(i as int).drop_first() =~= self@.0.skip(i + 1));
            }
            i += 1;
        }
        proof {
            lemma_count_nonzero_all_zero(self@.0);
        }
        None
    }
}

/// The integer `x` read as the rational `x / 1`.
pub closed spec fn qq_int(x: u128) -> QQ {
    QQ { inner: (x, 1) }
}

/// What `qq_int` builds, characterized for callers.
pub proof fn lemma_qq_int(x: u128)
    ensures
        qq_int(x).num() == x,
        qq_int(x).den() == 1,
{
}

/// A sequence of all-zero coefficients counts no nonzero entry.
proof fn lemma_count_nonzero_all_zero(s: Seq<QQ>)
    requires
        forall|j: int| 0 <= j < s.len() ==> qq_is_zero(#[trigger] s[j]),
    ensures
        count_nonzero(s) == 0,
    decreases s.len(),
{
    if s.len() > 0 {
        assert(forall|j: int| 0 <= j < s.drop_last().len() ==> qq_is_zero(
            #[trigger] s.drop_last()[j])) by {
            assert(forall|j: int| 0 <= j < s.drop_last().len() ==> s.drop_last()[j] == s[j]);
        }
        lemma_count_nonzero_all_zero(s.drop_last());
    }
}

impl Polynomial<QQ, QQ> for QQPolynomial {
    type Mono = QQMonomial;

    fn vars(&self) -> (r: Vec<Var>)
        ensures
            r@ == seq![self@.1],
    {
        let mut out: Vec<Var> = Vec::new();
        out.push(self.var);
        proof {
            assert(out@ =~= seq![self@.1]);
        }
        out
    }

    fn coef(&self, fmt: &MonomialFormat) -> (r: Result<QQ, AlgebraError>)
        ensures
            lookup_spec(fmt@, self@.1) is None ==> r == Err::<QQ, AlgebraError>(
                AlgebraError::VariableNotFound,
            ),
            lookup_spec(fmt@, self@.1) matches Some(d) ==> (d < self@.0.len() ==> r == Ok::<
                QQ,
                AlgebraError,
            >(self@.0[d as int])) && (d >= self@.0.len() ==> r == Err::<QQ, AlgebraError>(
                AlgebraError::IndexOutOfRange,
            )),
    {
        match fmt.get(self.var) {
            None => Err(AlgebraError::VariableNotFound),
            Some(index) => {
                if index < self.inner.len() {
                    Ok(self.inner[index])
                } else {
                    Err(AlgebraError::IndexOutOfRange)
                }
            },
        }
    }

    fn eval(&self, at: &Vec<(Var, QQ)>) -> (r: Result<QQ, AlgebraError>)
        ensures
            lookup_spec(at@, self@.1) matches Some(x) ==> r == Ok::<QQ, AlgebraError>(
                qq_poly_eval(self@.0, x),
            ),
            lookup_spec(at@, self@.1) is None ==> r == Err::<QQ, AlgebraError>(
                AlgebraError::VariableNotFound,
            ),
    {
        match lookup_var(at, self.var) {
            None => Err(AlgebraError::VariableNotFound),
            Some(value) => {
                let mut acc = QQ::zero();
                let mut i: usize = 0;
                proof {
                    assert(self@.0.take(0) =~= Seq::<QQ>::empty());
                }
                while i < self.inner.len()
                    invariant
                        i <= self@.0.len(),
                        acc == qq_poly_eval(self@.0.take(i as int), value),
                    decreases self@.0.len() - i,
                {
                    acc = acc.add(self.inner[i].mul(value.pow(i)));
                    proof {
                        let pre = self@.0.take(i + 1);
                        assert(pre.drop_last() =~= self@.0.take(i as int));
                        assert(pre.last() == self@.0[i as int]);
                    }
                    i += 1;
                }
                proof {
                    assert(self@.0.take(self@.0.len() as int) =~= self@.0);
                }
                Ok(acc)
            },
        }
    }

    fn is_monomial(&self) -> (r: bool)
        ensures
            r == (count_nonzero(self@.0) == 1),
    {
        let mut count: usize = 0;
        let mut i: usize = 0;
        proof {
            assert(self@.0.take(0) =~= Seq::<QQ>::empty());
        }
        while i < self.inner.len()
            invariant
                i <= self@.0.len(),
                count as nat == count_nonzero(self@.0.take(i as int)),
                count <= i,
            decreases self@.0.len() - i,
        {
            proof {
                let pre = self@.0.take(i + 1);
                assert(pre.drop_last() =~= self@.0.take(i as int));
                assert(pre.last() == self@.0[i as int]);
                lemma_qq_eq_zero(self@.0[i as int]);
            }
            if !self.inner[i].is_zero() {
                count += 1;
            }
            i += 1;
        }
        proof {
            assert(self@.0.take(self@.0.len() as int) =~= self@.0);
        }
        count == 1
    }

    /// Extracts the sole nonzero term: its index becomes the degree and its
    /// value the coefficient. Anything but exactly one nonzero coefficient
    /// is rejected, recoverably.
    fn try_into_monomial(self) -> (r: Result<QQMonomial, AlgebraError>)
        ensures
            count_nonzero(self@.0) == 1 ==> (r matches Ok(m) && m.degree == first_nonzero(self@.0)
                && m.coef == self@.0[first_nonzero(self@.0)] && m.var == self@.1),
            count_nonzero(self@.0) != 1 ==> r == Err::<QQMonomial, AlgebraError>(
                AlgebraError::NotAMonomial,
            ),
    {
        if self.is_monomial() {
            match self.first_nonzero_index() {
                Some(n) => Ok(QQMonomial { var: self.var, degree: n, coef: self.inner[n] }),
                None => Err(AlgebraError::NotAMonomial),
            }
        } else {
            Err(AlgebraError::NotAMonomial)
        }
    }
}

/// Zeros contribute nothing to the nonzero count.
proof fn lemma_count_nonzero_mono(degree: nat, coef: QQ)
    requires
        !qq_is_zero(coef),
    ensures
        count_nonzero(mono_coeffs(degree, coef)) == 1,
{
    let zeros = Seq::new(degree, |i: int| QQ::zero_spec());
    assert(forall|j: int| 0 <= j < zeros.len() ==> qq_is_zero(#[trigger] zeros[j]));
    lemma_count_nonzero_all_zero(zeros);
    assert(mono_coeffs(degree, coef).drop_last() =~= zeros);
    assert(mono_coeffs(degree, coef).last() == coef);
}

/// The first nonzero coefficient of a monomial's list sits at its degree.
proof fn lemma_first_nonzero_mono(degree: nat, coef: QQ)
    requires
        !qq_is_zero(coef),
    ensures
        first_nonzero(mono_coeffs(degree, coef)) == degree,
    decreases degree,
{
    let s = mono_coeffs(degree, coef);
    if degree == 0 {
        assert(s[0] == coef);
    } else {
        assert(s[0] == Seq::new(degree, |i: int| QQ::zero_spec())[0]);
        assert(qq_is_zero(s[0]));
        lemma_first_nonzero_mono((degree - 1) as nat, coef);
        assert(s.drop_first() =~= mono_coeffs((degree - 1) as nat, coef));
    }
}

/// Law: converting a monomial with nonzero coefficient into a polynomial
/// and back succeeds and reproduces its degree and coefficient — the
/// coefficient list it denotes has exactly one nonzero entry, at the
/// monomial's degree, holding its coefficient.
pub proof fn lemma_monomial_round_trip(m: QQMonomial)
    requires
        !qq_is_zero(m.coef),
    ensures
        count_nonzero(mono_coeffs(m.degree as nat, m.coef)) == 1,
        first_nonzero(mono_coeffs(m.degree as nat, m.coef)) == m.degree,
        mono_coeffs(m.degree as nat, m.coef)[m.degree as int] == m.coef,
{
    lemma_count_nonzero_mono(m.degree as nat, m.coef);
    lemma_first_nonzero_mono(m.degree as nat, m.coef);
    assert(mono_coeffs(m.degree as nat, m.coef)[m.degree as int] == m.coef);
}

} // verus!

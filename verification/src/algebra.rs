//! The abstract algebra tower — additive groups, rings, fields, scalar
//! modules and algebras — together with the variable table, bound-variable
//! handles, the monomial format, and the monomial and polynomial interfaces.
use vstd::prelude::*;
use vstd::std_specs::cmp::PartialEqSpec;
use crate::{BasicObject, BasicObjectCopy};

verus! {

/// The failures this library's constructors and lookups surface to the
/// caller: each is distinguishable, none is swallowed.
#[derive(Clone, Copy, Debug, PartialEq, Eq, Structural)]
pub enum AlgebraError {
    /// A rational was about to be built with a zero denominator.
    ZeroDivisor,
    /// A name was registered twice against one variable table.
    DuplicateVariable,
    /// An index lay beyond the table or coefficient bounds.
    IndexOutOfRange,
    /// A variable was looked up that the table or assignment does not hold.
    VariableNotFound,
    /// A polynomial with more or fewer than one nonzero coefficient was
    /// converted to a monomial.
    NotAMonomial,
}

impl AlgebraError {
    /// A short description of the failure, identifying what was missing or
    /// rejected.
    pub fn message(&self) -> (r: &'static str)
        ensures
            *self is ZeroDivisor ==> r@ == "0 cannot be divisor"@,
            *self is DuplicateVariable ==> r@ == "variable already defined"@,
            *self is IndexOutOfRange ==> r@ == "index is out of range"@,
            *self is VariableNotFound ==> r@ == "no such a variable"@,
            *self is NotAMonomial ==> r@ == "it is not a monomial"@,
    {
        match self {
            AlgebraError::ZeroDivisor => "0 cannot be divisor",
            AlgebraError::DuplicateVariable => "variable already defined",
            AlgebraError::IndexOutOfRange => "index is out of range",
            AlgebraError::VariableNotFound => "no such a variable",
            AlgebraError::NotAMonomial => "it is not a monomial",
        }
    }
}

/// An additive group: a distinguished zero and an addition. `is_zero` is
/// derived from equality with the distinguished zero, never stored.
pub trait AddGroup: BasicObjectCopy {
    /// The distinguished zero, as a specification value.
    spec fn zero_spec() -> Self;

    /// What addition returns, as a specification value.
    spec fn add_spec(self, other: Self) -> Self;

    fn zero() -> (r: Self)
        ensures
            r == Self::zero_spec(),
    ;

    fn add(self, other: Self) -> (r: Self)
        ensures
            r == self.add_spec(other),
    ;

    fn is_zero(&self) -> (r: bool)
        ensures
            Self::obeys_eq_spec() ==> r == self.eq_spec(&Self::zero_spec()),
    ;
}

/// A ring: an additive group with a distinguished one and a multiplication.
/// `is_one` is derived from equality with the distinguished one, and `pow`
/// from repeated multiplication.
pub trait Ring: AddGroup {
    /// The distinguished one, as a specification value.
    spec fn one_spec() -> Self;

    /// What multiplication returns, as a specification value.
    spec fn mul_spec(self, other: Self) -> Self;

    /// What `pow` returns, as a specification value.
    spec fn pow_of(self, n: nat) -> Self;

    /// Every implementation must define `pow_of` as repeated multiplication
    /// starting from the ring's one: `n == 0` yields one whatever the base.
    proof fn pow_of_unfold(self, n: nat)
        ensures
            n == 0 ==> self.pow_of(n) == Self::one_spec(),
            n > 0 ==> self.pow_of(n) == self.pow_of((n - 1) as nat).mul_spec(self),
    ;

    fn one() -> (r: Self)
        ensures
            r == Self::one_spec(),
    ;

    fn mul(self, other: Self) -> (r: Self)
        ensures
            r == self.mul_spec(other),
    ;

    fn is_one(&self) -> (r: bool)
        ensures
            Self::obeys_eq_spec() ==> r == self.eq_spec(&Self::one_spec()),
    {
        *self == Self::one()
    }

    fn pow(&self, n: usize) -> (r: Self)
        ensures
            r == self.pow_of(n as nat),
    {
        let mut acc = Self::one();
        proof {
            self.pow_of_unfold(0);
        }
        let mut i: usize = 0;
        while i < n
            invariant
                i <= n,
                acc == self.pow_of(i as nat),
            decreases n - i,
        {
            acc = acc.mul(*self);
            proof {
                self.pow_of_unfold((i + 1) as nat);
            }
            i += 1;
        }
        acc
    }
}

/// A field: a ring whose nonzero elements divide. Division here is total on
/// the representation; what it returns is the implementing type's business.
pub trait Field: Ring {
    /// What division returns, as a specification value.
    spec fn div_spec(self, other: Self) -> Self;

    fn div(self, other: Self) -> (r: Self)
        ensures
            r == self.div_spec(other),
    ;
}

/// Scaling by a ring element, independent of the type's own multiplication.
pub trait ScaMul<R: Ring>: Sized {
    /// What scaling returns, as a specification value.
    spec fn sca_mul_spec(self, sca: R) -> Self;

    fn sca_mul(self, sca: R) -> (r: Self)
        ensures
            r == self.sca_mul_spec(sca),
    ;
}

/// A module over a ring: an additive group that can be scaled by the ring.
pub trait Module<R: Ring>: AddGroup + ScaMul<R> {

}

/// An algebra over a ring: a ring that is simultaneously a module over it,
/// with both an intrinsic multiplication and an external scaling.
pub trait Algebra<R: Ring>: Ring + Module<R> {

}

/// Whether the table, seen as its sequence of names, holds `name`.
pub open spec fn table_contains(t: Seq<Seq<char>>, name: Seq<char>) -> bool {
    exists|i: int| 0 <= i < t.len() && t[i] == name
}

/// An append-only registry of unique variable names. Registration is the
/// only mutation, so indices handed out earlier stay valid as the table
/// grows.
#[derive(Debug, Clone, PartialEq, Eq)]
pub struct VarTable {
    names: Vec<String>,
}

impl View for VarTable {
    type V = Seq<Seq<char>>;

    closed spec fn view(&self) -> Seq<Seq<char>> {
        self.names@.map_values(|s: String| s@)
    }
}

impl BasicObject for VarTable {

}

impl VarTable {
    /// The empty table.
    pub fn new() -> (r: VarTable)
        ensures
            r@ == Seq::<Seq<char>>::empty(),
    {
        let t = VarTable { names: Vec::new() };
        proof {
            assert(t@ =~= Seq::<Seq<char>>::empty());
        }
        t
    }

    /// How many names are registered.
    pub fn len(&self) -> (n: usize)
        ensures
            n == self@.len(),
    {
        self.names.len()
    }

    /// Whether `name` is already registered.
    pub fn contains(&self, name: &String) -> (r: bool)
        ensures
            r == table_contains(self@, name@),
    {
        let mut i: usize = 0;
        while i < self.names.len()
            invariant
                i <= self@.len(),
                forall|j: int| 0 <= j < i ==> self@[j] != name@,
            decreases self@.len() - i,
        {
            if self.names[i] == *name {
                proof {
                    assert(self@[i as int] == self.names@[i as int]@);
                }
                return true;
            }
            i += 1;
        }
        false
    }
}

/// A bound variable: an opaque handle naming one entry of one variable
/// table. It is meaningful only against the table that produced it, which
/// the caller passes explicitly wherever a name is needed; two handles are
/// equal when they hold the same index.
#[derive(Clone, Copy, Debug, PartialEq, Eq, Structural)]
pub struct Var {
    index: usize,
}

impl BasicObject for Var {

}

impl BasicObjectCopy for Var {

}

impl Var {
    /// The index this handle is bound to.
    pub closed spec fn idx(self) -> usize {
        self.index
    }

    /// The index this handle is bound to, for callers outside the library.
    pub fn index(&self) -> (i: usize)
        ensures
            i == self.idx(),
    {
        self.index
    }

    /// Registers a fresh name and returns the handle bound at the new
    /// highest index; a name already present is rejected and the table is
    /// left unchanged.
    pub fn new(name: String, vt: &mut VarTable) -> (r: Result<Var, AlgebraError>)
        ensures
            table_contains(old(vt)@, name@) ==> r == Err::<Var, AlgebraError>(
                AlgebraError::DuplicateVariable,
            ) && final(vt)@ == old(vt)@,
            !table_contains(old(vt)@, name@) ==> final(vt)@ == old(vt)@.push(name@) && (r matches Ok(v)
                && v.idx() == old(vt)@.len()),
    {
        if vt.contains(&name) {
            Err(AlgebraError::DuplicateVariable)
        } else {
            let index = vt.names.len();
            vt.names.push(name);
            proof {
                assert(vt@ =~= old(vt)@.push(vt.names@.last()@));
            }
            Ok(Var { index })
        }
    }

    /// Binds to the entry at `index`; an index at or beyond the table's
    /// length is rejected.
    pub fn from_index(index: usize, vt: &VarTable) -> (r: Result<Var, AlgebraError>)
        ensures
            index >= vt@.len() ==> r == Err::<Var, AlgebraError>(AlgebraError::IndexOutOfRange),
            index < vt@.len() ==> (r matches Ok(v) && v.idx() == index),
    {
        if index >= vt.names.len() {
            Err(AlgebraError::IndexOutOfRange)
        } else {
            Ok(Var { index })
        }
    }

    /// Binds to the first entry whose name equals `name`; a name the table
    /// does not hold is rejected.
    pub fn from_name(name: String, vt: &VarTable) -> (r: Result<Var, AlgebraError>)
        ensures
            table_contains(vt@, name@) ==> (r matches Ok(v) && v.idx() < vt@.len()
                && vt@[v.idx() as int] == name@ && forall|j: int|
                0 <= j < v.idx() ==> vt@[j] != name@),
            !table_contains(vt@, name@) ==> r == Err::<Var, AlgebraError>(
                AlgebraError::VariableNotFound,
            ),
    {
        let mut i: usize = 0;
        while i < vt.names.len()
            invariant
                i <= vt@.len(),
                forall|j: int| 0 <= j < i ==> vt@[j] != name@,
            decreases vt@.len() - i,
        {
            if vt.names[i] == name {
                proof {
                    assert(vt@[i as int] == vt.names@[i as int]@);
                }
                return Ok(Var { index: i });
            }
            i += 1;
        }
        Err(AlgebraError::VariableNotFound)
    }

    /// The table entry this handle is bound to; infallible for a handle the
    /// table produced.
    pub fn name(&self, vt: &VarTable) -> (r: String)
        requires
            self.idx() < vt@.len(),
        ensures
            r@ == vt@[self.idx() as int],
    {
        vt.names[self.index].clone()
    }
}

/// First-match lookup among `(variable, value)` pairs.
pub open spec fn lookup_spec<A>(s: Seq<(Var, A)>, v: Var) -> Option<A>
    decreases s.len(),
{
    if s.len() == 0 {
        None
    } else if s[0].0 == v {
        Some(s[0].1)
    } else {
        lookup_spec(s.drop_first(), v)
    }
}

/// Scans `at` from the front and returns the value paired with the first
/// occurrence of `v`, if any.
pub fn lookup_var<A: Copy>(at: &Vec<(Var, A)>, v: Var) -> (r: Option<A>)
    ensures
        r == lookup_spec(at@, v),
{
    proof {
        assert(at@.skip(0) =~= at@);
    }
    let mut i: usize = 0;
    while i < at.len()
        invariant
            i <= at@.len(),
            lookup_spec(at@, v) == lookup_spec(at@.skip(i as int), v),
        decreases at@.len() - i,
    {
        proof {
            assert(at@.skip(i as int)[0] == at@[i as int]);
        }
        if at[i].0 == v {
            return Some(at[i].1);
        }
        proof {
            assert(at@.skip(i as int).drop_first() =~= at@.skip(i + 1));
        }
        i += 1;
    }
    None
}

/// The shape of a monomial: each variable paired with its degree. A
/// single-variable monomial holds one entry.
#[derive(Debug, Clone, PartialEq, Eq)]
pub struct MonomialFormat {
    entries: Vec<(Var, usize)>,
}

impl View for MonomialFormat {
    type V = Seq<(Var, usize)>;

    closed spec fn view(&self) -> Seq<(Var, usize)> {
        self.entries@
    }
}

impl BasicObject for MonomialFormat {

}

impl MonomialFormat {
    /// Wraps the given variable-to-degree pairs.
    pub fn from(m: Vec<(Var, usize)>) -> (r: MonomialFormat)
        ensures
            r@ == m@,
    {
        MonomialFormat { entries: m }
    }

    /// The degree recorded for `v`, at its first occurrence.
    pub fn get(&self, v: Var) -> (r: Option<usize>)
        ensures
            r == lookup_spec(self@, v),
    {
        lookup_var(&self.entries, v)
    }
}

/// A monomial over the ring `R` inside the algebra `A`: one coefficient, one
/// bound variable, one degree.
pub trait Monomial<R: Ring, A: Algebra<R>>: BasicObjectCopy {
    /// The polynomial type a monomial converts into.
    type Poly;

    /// The variables this monomial mentions.
    fn vars(&self) -> Vec<Var>;

    /// The coefficient.
    fn coef(&self) -> R;

    /// Evaluates at the value the assignment pairs with the monomial's
    /// variable; an absent variable is rejected.
    fn eval(&self, at: &Vec<(Var, A)>) -> Result<A, AlgebraError>;

    /// The monomial's shape: its variable paired with its degree.
    fn into_format(self) -> MonomialFormat;

    /// The same value as a polynomial.
    fn into_polynomial(self) -> Self::Poly;
}

/// A single-variable polynomial over the ring `R` inside the algebra `A`,
/// stored as coefficients indexed by degree with no trailing zero.
pub trait Polynomial<R: Ring, A: Algebra<R>>: BasicObject {
    /// The monomial type a polynomial converts into.
    type Mono;

    /// The variables this polynomial mentions.
    fn vars(&self) -> Vec<Var>;

    /// The coefficient at the degree the format records for this
    /// polynomial's variable.
    fn coef(&self, fmt: &MonomialFormat) -> Result<R, AlgebraError>;

    /// Evaluates at the value the assignment pairs with the polynomial's
    /// variable; an absent variable is rejected.
    fn eval(&self, at: &Vec<(Var, A)>) -> Result<A, AlgebraError>;

    /// Whether exactly one coefficient is nonzero.
    fn is_monomial(&self) -> bool;

    /// Extracts the sole nonzero term; a polynomial with more or fewer than
    /// one nonzero coefficient is rejected, recoverably.
    fn try_into_monomial(self) -> Result<Self::Mono, AlgebraError>;
}

} // verus!

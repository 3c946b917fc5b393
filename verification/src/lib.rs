//! An exploratory mathematics library: a tail-compressed infinite-sequence
//! container, an abstract algebra tower (additive groups, rings, fields,
//! modules), exact integers and rationals built on fixed-width unsigned
//! arithmetic, a variable table with bound-variable handles, and
//! single-variable polynomials and monomials over the rationals, together
//! with a small cell-complex model that consumes the sequence container.
use vstd::prelude::*;

pub mod algebra;
pub mod complexes;
pub mod num;
pub mod tools;

verus! {

/// The capability bundle that every algebraic value carries: it can be
/// rendered for debugging, cloned, and compared for equality.
pub trait BasicObject: Sized + core::fmt::Debug + Clone + PartialEq + Eq {

}

/// The stricter bundle for values that are duplicated by plain copy,
/// without an explicit clone.
pub trait BasicObjectCopy: BasicObject + Copy {

}

impl BasicObject for char {

}

} // verus!

//! Discrete colormap boundaries.

use vstd::prelude::*;
use vstd::std_specs::convert::IntoSpec;

use crate::write_checks::NumberType;

verus! {

/// A discrete colormap boundary: values below it, or up to and including it, take the
/// boundary's color.
#[derive(Debug, Clone, Copy, PartialEq)]
pub enum Boundary<T: NumberType> {
    /// Values strictly below the boundary.
    Less(T),
    /// Values below or equal to the boundary.
    LessEqual(T),
}

impl<T: NumberType> Boundary<T> {
    /// The boundary value.
    pub open spec fn spec_value(self) -> T {
        match self {
            Boundary::Less(v) => v,
            Boundary::LessEqual(v) => v,
        }
    }

    /// True if the boundary value itself is included.
    pub open spec fn spec_is_inclusive(self) -> bool {
        self is LessEqual
    }

    /// The boundary of the same kind at value `v`.
    pub open spec fn spec_with_value<U: NumberType>(self, v: U) -> Boundary<U> {
        match self {
            Boundary::Less(_) => Boundary::Less(v),
            Boundary::LessEqual(_) => Boundary::LessEqual(v),
        }
    }

    /// Converts a boundary of another number type, keeping whether it is inclusive.
    pub fn from<U: NumberType + Into<T>>(other: Boundary<U>) -> (r: Self)
        ensures
            r.spec_is_inclusive() == other.spec_is_inclusive(),
            <U as IntoSpec<T>>::obeys_into_spec() ==> r.spec_value() == <U as IntoSpec<
                T,
            >>::into_spec(other.spec_value()),
    {
        match other {
            Boundary::Less(value) => Boundary::Less(value.into()),
            Boundary::LessEqual(value) => Boundary::LessEqual(value.into()),
        }
    }

    /// A boundary at `value`, inclusive or not.
    pub fn from_value(value: T, is_inclusive: bool) -> (r: Self)
        ensures
            r.spec_value() == value,
            r.spec_is_inclusive() == is_inclusive,
    {
        if is_inclusive {
            Boundary::LessEqual(value)
        } else {
            Boundary::Less(value)
        }
    }

    /// Returns the boundary value.
    pub fn value(self) -> (r: T)
        ensures
            r == self.spec_value(),
    {
        match self {
            Boundary::Less(value) | Boundary::LessEqual(value) => value,
        }
    }

    /// Returns true if the boundary value itself is included.
    pub fn is_inclusive(self) -> (r: bool)
        ensures
            r == self.spec_is_inclusive(),
    {
        match self {
            Boundary::Less(_) => false,
            Boundary::LessEqual(_) => true,
        }
    }

    /// Applies `func` to the boundary value, keeping whether it is inclusive.
    pub fn map<U: NumberType, F: FnOnce(T) -> U>(self, func: F) -> (r: Boundary<U>)
        requires
            func.requires((self.spec_value(),)),
        ensures
            func.ensures((self.spec_value(),), r.spec_value()),
            r.spec_is_inclusive() == self.spec_is_inclusive(),
            r == self.spec_with_value(r.spec_value()),
    {
        match self {
            Boundary::Less(t) => Boundary::Less(func(t)),
            Boundary::LessEqual(t) => Boundary::LessEqual(func(t)),
        }
    }
}

/// Mapping a boundary by the identity gives it back: a boundary of the same kind at its own
/// value is the boundary itself.
pub proof fn lemma_map_identity<T: NumberType>(b: Boundary<T>)
    ensures
        b.spec_with_value(b.spec_value()) == b,
{
}

/// Mapping by `f` and then by `g` is mapping by `g` after `f`: only the last value counts,
/// and the kind is kept throughout.
pub proof fn lemma_map_compose<T: NumberType, U: NumberType, V: NumberType>(
    b: Boundary<T>,
    u: U,
    v: V,
)
    ensures
        b.spec_with_value(u).spec_with_value(v) == b.spec_with_value(v),
        b.spec_with_value(u).spec_value() == u,
        b.spec_with_value(u).spec_is_inclusive() == b.spec_is_inclusive(),
{
}

} // verus!

//! Variables and their finite domains.

use std::collections::HashSet;
use std::hash::Hash;
use vstd::prelude::*;
use vstd::std_specs::cmp::PartialEqSpec;
use vstd::std_specs::hash::*;

verus! {

/// A type whose values can populate a domain: it can be hashed and compared.
pub trait Domainable: Hash + Eq {

}

impl<T: Hash + Eq> Domainable for T {

}

/// Whether hashing and `==` on `T` agree with mathematical equality, so that
/// a hash set of `T` is a faithful finite set of values. This holds of the
/// primitive integer types and of `bool`.
pub open spec fn faithful<T: Domainable>() -> bool {
    &&& obeys_key_model::<T>()
    &&& T::obeys_eq_spec()
    &&& forall|a: T, b: T| #[trigger] a.eq_spec(&b) <==> a == b
}

/// What a variable is: the identity that tells it from every other variable
/// of a problem, and the set of values it may take.
#[verifier::reject_recursive_types(T)]
pub ghost struct VariableView<T> {
    pub id: u64,
    pub domain: Set<T>,
}

/// A variable of a problem. Its domain is fixed when it is created.
pub struct Variable<T: Domainable> {
    id: u64,
    domain: HashSet<T>,
}

impl<T: Domainable> View for Variable<T> {
    type V = VariableView<T>;

    closed spec fn view(&self) -> VariableView<T> {
        VariableView { id: self.id, domain: self.domain@ }
    }
}

impl<T: Domainable> Variable<T> {
    /// Creates the variable `id` with the given domain. Any domain is
    /// accepted, the empty one included.
    pub fn new(id: u64, domain: HashSet<T>) -> (v: Variable<T>)
        ensures
            v@.id == id,
            v@.domain == domain@,
    {
        Variable { id, domain }
    }

    /// The identity of the variable.
    pub fn id(&self) -> (id: u64)
        ensures
            id == self@.id,
    {
        self.id
    }

    /// Whether `value` belongs to the domain.
    pub fn contains(&self, value: &T) -> (b: bool)
        requires
            faithful::<T>(),
        ensures
            b == self@.domain.contains(*value),
    {
        broadcast use group_hash_axioms;

        self.domain.contains(value)
    }
}

} // verus!

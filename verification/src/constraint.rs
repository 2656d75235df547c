//! Binary constraints and collections of them.

use crate::variable::{faithful, Domainable, Variable, VariableView};
use vstd::prelude::*;

verus! {

/// What a binary constraint says: the one admissible value of each of its two
/// variables.
#[verifier::reject_recursive_types(T)]
pub ghost struct ConstraintView<T> {
    pub var1: VariableView<T>,
    pub var1_value: T,
    pub var2: VariableView<T>,
    pub var2_value: T,
}

impl<T> ConstraintView<T> {
    /// Both values belong to the domain of their variable.
    pub open spec fn within_domains(self) -> bool {
        &&& self.var1.domain.contains(self.var1_value)
        &&& self.var2.domain.contains(self.var2_value)
    }
}

/// Why a constraint could not be built.
#[derive(Clone, Copy, Debug, PartialEq, Eq)]
pub enum ConstraintError {
    /// The value given for the first variable is not in its domain.
    FirstValueOutOfDomain,
    /// The value given for the second variable is not in its domain, while
    /// the first one is in its own.
    SecondValueOutOfDomain,
}

/// A constraint over two variables that admits exactly one value for each.
pub struct BinaryConstraint<'a, T: Domainable> {
    var1: &'a Variable<T>,
    var1_value: T,
    var2: &'a Variable<T>,
    var2_value: T,
}

impl<'a, T: Domainable> View for BinaryConstraint<'a, T> {
    type V = ConstraintView<T>;

    closed spec fn view(&self) -> ConstraintView<T> {
        ConstraintView {
            var1: self.var1@,
            var1_value: self.var1_value,
            var2: self.var2@,
            var2_value: self.var2_value,
        }
    }
}

impl<'a, T: Domainable> BinaryConstraint<'a, T> {
    #[verifier::type_invariant]
    spec fn inv(self) -> bool {
        self@.within_domains()
    }

    /// Builds the constraint that admits `var1_value` for `var1` and
    /// `var2_value` for `var2`. Both values must belong to the domain of
    /// their variable.
    pub fn new(var1: &'a Variable<T>, var1_value: T, var2: &'a Variable<T>, var2_value: T) -> (c:
        BinaryConstraint<'a, T>)
        requires
            var1@.domain.contains(var1_value),
            var2@.domain.contains(var2_value),
        ensures
            c@ == (ConstraintView {
                var1: var1@,
                var1_value: var1_value,
                var2: var2@,
                var2_value: var2_value,
            }),
    {
        BinaryConstraint { var1, var1_value, var2, var2_value }
    }

    /// Builds the constraint as `new` does when both values belong to the
    /// domain of their variable, and says which one does not otherwise.
    pub fn try_new(
        var1: &'a Variable<T>,
        var1_value: T,
        var2: &'a Variable<T>,
        var2_value: T,
    ) -> (r: Result<BinaryConstraint<'a, T>, ConstraintError>)
        requires
            faithful::<T>(),
        ensures
            match r {
                Ok(c) => {
                    &&& var1@.domain.contains(var1_value)
                    &&& var2@.domain.contains(var2_value)
                    &&& c@ == (ConstraintView {
                        var1: var1@,
                        var1_value: var1_value,
                        var2: var2@,
                        var2_value: var2_value,
                    })
                },
                Err(ConstraintError::FirstValueOutOfDomain) => !var1@.domain.contains(var1_value),
                Err(ConstraintError::SecondValueOutOfDomain) => {
                    &&& var1@.domain.contains(var1_value)
                    &&& !var2@.domain.contains(var2_value)
                },
            },
    {
        if !var1.contains(&var1_value) {
            Err(ConstraintError::FirstValueOutOfDomain)
        } else if !var2.contains(&var2_value) {
            Err(ConstraintError::SecondValueOutOfDomain)
        } else {
            Ok(BinaryConstraint::new(var1, var1_value, var2, var2_value))
        }
    }

    /// The first variable.
    pub fn var1(&self) -> (v: &'a Variable<T>)
        ensures
            v@ == self@.var1,
    {
        self.var1
    }

    /// The value admitted for the first variable; it belongs to its domain.
    pub fn var1_value(&self) -> (v: &T)
        ensures
            *v == self@.var1_value,
            self@.var1.domain.contains(*v),
    {
        proof {
            use_type_invariant(self);
        }
        &self.var1_value
    }

    /// The second variable.
    pub fn var2(&self) -> (v: &'a Variable<T>)
        ensures
            v@ == self@.var2,
    {
        self.var2
    }

    /// The value admitted for the second variable; it belongs to its domain.
    pub fn var2_value(&self) -> (v: &T)
        ensures
            *v == self@.var2_value,
            self@.var2.domain.contains(*v),
    {
        proof {
            use_type_invariant(self);
        }
        &self.var2_value
    }
}

/// The set of constraints that a sequence of them lists.
pub open spec fn listed<T: Domainable>(constraints: Seq<&BinaryConstraint<T>>) -> Set<
    ConstraintView<T>,
> {
    Set::new(
        |c: ConstraintView<T>|
            exists|i: int| 0 <= i < constraints.len() && (#[trigger] constraints[i])@ == c,
    )
}

/// A set of binary constraints. It has no order and holds no constraint twice.
pub struct Constraints<'a, T: Domainable> {
    constraints: Vec<&'a BinaryConstraint<'a, T>>,
}

impl<'a, T: Domainable> View for Constraints<'a, T> {
    type V = Set<ConstraintView<T>>;

    closed spec fn view(&self) -> Set<ConstraintView<T>> {
        listed(self.constraints@)
    }
}

impl<'a, T: Domainable> Constraints<'a, T> {
    /// Gathers the given constraints into a set. A constraint listed more
    /// than once is held once.
    pub fn new(constraints: Vec<&'a BinaryConstraint<'a, T>>) -> (r: Constraints<'a, T>)
        ensures
            r@ == listed(constraints@),
    {
        Constraints { constraints }
    }

    /// The constraints in the order in which they are stored.
    pub(crate) closed spec fn stored(&self) -> Seq<&BinaryConstraint<'a, T>> {
        self.constraints@
    }

    pub(crate) proof fn lemma_stored(&self)
        ensures
            self@ == listed(self.stored()),
    {
    }

    pub(crate) fn len(&self) -> (n: usize)
        ensures
            n == self.stored().len(),
    {
        self.constraints.len()
    }

    pub(crate) fn get(&self, i: usize) -> (c: &'a BinaryConstraint<'a, T>)
        requires
            i < self.stored().len(),
        ensures
            c == self.stored()[i as int],
    {
        self.constraints[i]
    }
}

} // verus!

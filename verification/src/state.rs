//! Partial assignments of values to variables, and the two predicates on them.

use crate::constraint::{listed, ConstraintView, Constraints};
use crate::variable::{faithful, Domainable, Variable};
use std::collections::HashMap;
use vstd::prelude::*;
use vstd::std_specs::hash::*;
use vstd::std_specs::iter::IteratorSpec;

verus! {

/// The assignment that holds a slot for each of `ids` and a value in none.
pub open spec fn unassigned<T>(ids: Set<u64>) -> Map<u64, Option<T>> {
    Map::new(|id: u64| ids.contains(id), |id: u64| None::<T>)
}

/// Every slot of the assignment holds a value.
pub open spec fn complete<T>(slots: Map<u64, Option<T>>) -> bool {
    forall|id: u64| slots.dom().contains(id) ==> (#[trigger] slots[id]) is Some
}

/// The assignment has a slot for both variables of the constraint.
pub open spec fn covers<T>(slots: Map<u64, Option<T>>, c: ConstraintView<T>) -> bool {
    &&& slots.dom().contains(c.var1.id)
    &&& slots.dom().contains(c.var2.id)
}

/// The assignment does not violate the constraint: each of its two variables
/// is either without a value or holds the value that the constraint admits.
pub open spec fn satisfies<T>(slots: Map<u64, Option<T>>, c: ConstraintView<T>) -> bool {
    &&& slots[c.var1.id] matches Some(v) ==> v == c.var1_value
    &&& slots[c.var2.id] matches Some(v) ==> v == c.var2_value
}

/// The assignment has a slot for every variable that a constraint mentions.
pub open spec fn covers_all<T>(slots: Map<u64, Option<T>>, cs: Set<ConstraintView<T>>) -> bool {
    forall|c: ConstraintView<T>| cs.contains(c) ==> #[trigger] covers(slots, c)
}

/// The assignment violates none of the constraints.
pub open spec fn consistent<T>(slots: Map<u64, Option<T>>, cs: Set<ConstraintView<T>>) -> bool {
    forall|c: ConstraintView<T>| cs.contains(c) ==> #[trigger] satisfies(slots, c)
}

/// The identities of the variables that a sequence lists.
pub open spec fn identities<T: Domainable>(variables: Seq<&Variable<T>>) -> Set<u64> {
    Set::new(
        |id: u64| exists|i: int| 0 <= i < variables.len() && (#[trigger] variables[i])@.id == id,
    )
}

/// Listing one more variable adds its identity to those listed before.
proof fn lemma_identities_push<T: Domainable>(variables: Seq<&Variable<T>>, last: &Variable<T>)
    ensures
        identities(variables.push(last)) == identities(variables).insert(last@.id),
{
    let longer = variables.push(last);
    assert forall|id: u64| identities(longer).contains(id) implies identities(variables).insert(
        last@.id,
    ).contains(id) by {
        let i = choose|i: int| 0 <= i < longer.len() && (#[trigger] longer[i])@.id == id;
        if i < variables.len() {
            assert(variables[i]@.id == id);
        }
    }
    assert forall|id: u64| identities(variables).insert(last@.id).contains(id) implies identities(
        longer,
    ).contains(id) by {
        if id == last@.id {
            assert(longer[variables.len() as int]@.id == id);
        } else {
            let i = choose|i: int| 0 <= i < variables.len() && (#[trigger] variables[i])@.id == id;
            assert(longer[i]@.id == id);
        }
    }
}

/// Why an operation on a state was refused.
#[derive(Clone, Copy, Debug, PartialEq, Eq)]
pub enum StateError {
    /// The state has no slot for the variable.
    UnknownVariable,
    /// The value is not in the domain of the variable.
    ValueOutOfDomain,
}

/// The current assignment of a problem: one slot for each variable, which
/// holds the value given to it or nothing.
pub struct State<T: Domainable> {
    assignments: HashMap<u64, Option<T>>,
}

impl<T: Domainable> View for State<T> {
    type V = Map<u64, Option<T>>;

    closed spec fn view(&self) -> Map<u64, Option<T>> {
        self.assignments@
    }
}

impl<T: Domainable> State<T> {
    /// Creates the state over the given variables, with a value for none.
    pub fn new(variables: Vec<&Variable<T>>) -> (s: State<T>)
        ensures
            s@ == unassigned::<T>(identities(variables@)),
    {
        broadcast use group_hash_axioms;

        let mut assignments: HashMap<u64, Option<T>> = HashMap::new();
        for i in 0..variables.len()
            invariant
                assignments@ == unassigned::<T>(identities(variables@.take(i as int))),
        {
            assignments.insert(variables[i].id(), None);
            proof {
                assert(variables@.take(i + 1) == variables@.take(i as int).push(variables@[i as int]));
                lemma_identities_push(variables@.take(i as int), variables@[i as int]);
            }
        }
        assert(variables@.take(variables.len() as int) == variables@);
        State { assignments }
    }

    /// Whether every variable of the state has a value.
    pub fn is_complete(&self) -> (b: bool)
        ensures
            b == complete(self@),
    {
        broadcast use group_hash_axioms;

        let ghost slots = self.assignments.values().remaining();
        let ghost mut seen: int = 0;
        for value in it: self.assignments.values()
            invariant
                it.seq() == slots,
                seen == it.index(),
                slots.unref().to_set() == self@.values(),
                forall|j: int| 0 <= j < seen ==> (#[trigger] slots[j]) is Some,
        {
            if value.is_none() {
                proof {
                    assert(slots.unref()[seen] is None);
                    assert(slots.unref().to_set().contains(slots.unref()[seen]));
                    assert(self@.contains_value(None));
                }
                return false;
            }
            proof {
                seen = seen + 1;
            }
        }
        proof {
            assert forall|id: u64| self@.dom().contains(id) implies (#[trigger] self@[id]) is Some by {
                assert(self@.contains_value(self@[id]));
                assert(slots.unref().to_set().contains(self@[id]));
                let j = choose|j: int| 0 <= j < slots.unref().len() && slots.unref()[j] == self@[id];
                assert(slots[j] is Some);
            }
        }
        true
    }

    /// Whether the slot of variable `id` leaves `value` possible: it holds
    /// nothing, or `value` itself. `None` when the state has no such slot.
    fn admits(&self, id: u64, value: &T) -> (r: Option<bool>)
        requires
            faithful::<T>(),
        ensures
            match r {
                Some(b) => self@.dom().contains(id) && b == (self@[id] matches Some(v) ==> v
                    == *value),
                None => !self@.dom().contains(id),
            },
    {
        broadcast use group_hash_axioms;

        match self.assignments.get(&id) {
            None => None,
            Some(None) => Some(true),
            Some(Some(v)) => Some(*v == *value),
        }
    }

    /// Whether the state violates none of the constraints. A variable without
    /// a value violates nothing. The state must have a slot for every
    /// variable that a constraint mentions.
    pub fn is_consistent(&self, constraints: &Constraints<'_, T>) -> (b: bool)
        requires
            faithful::<T>(),
            covers_all(self@, constraints@),
        ensures
            b == consistent(self@, constraints@),
    {
        proof {
            constraints.lemma_stored();
        }
        let n = constraints.len();
        for i in 0..n
            invariant
                n == constraints.stored().len(),
                faithful::<T>(),
                covers_all(self@, constraints@),
                constraints@ == listed(constraints.stored()),
                forall|j: int| 0 <= j < i ==> satisfies(self@, (#[trigger] constraints.stored()[j])@),
        {
            let c = constraints.get(i);
            assert(constraints@.contains(c@));
            assert(covers(self@, c@));
            let first = self.admits(c.var1().id(), c.var1_value());
            let second = self.admits(c.var2().id(), c.var2_value());
            if first == Some(false) || second == Some(false) {
                assert(!satisfies(self@, c@));
                return false;
            }
        }
        true
    }

    /// Decides consistency as `is_consistent` does, for any set of
    /// constraints: where one of them mentions a variable that the state has
    /// no slot for, the answer is `UnknownVariable`.
    pub fn try_is_consistent(&self, constraints: &Constraints<'_, T>) -> (r: Result<
        bool,
        StateError,
    >)
        requires
            faithful::<T>(),
        ensures
            match r {
                Ok(b) => covers_all(self@, constraints@) && b == consistent(self@, constraints@),
                Err(e) => !covers_all(self@, constraints@) && e == StateError::UnknownVariable,
            },
    {
        proof {
            constraints.lemma_stored();
        }
        let mut holds = true;
        let n = constraints.len();
        for i in 0..n
            invariant
                n == constraints.stored().len(),
                faithful::<T>(),
                constraints@ == listed(constraints.stored()),
                forall|j: int| 0 <= j < i ==> covers(self@, (#[trigger] constraints.stored()[j])@),
                holds == (forall|j: int|
                    0 <= j < i ==> satisfies(self@, (#[trigger] constraints.stored()[j])@)),
        {
            let c = constraints.get(i);
            assert(constraints@.contains(c@));
            let first = self.admits(c.var1().id(), c.var1_value());
            let second = self.admits(c.var2().id(), c.var2_value());
            match (first, second) {
                (Some(a), Some(b)) => {
                    assert((a && b) == satisfies(self@, c@));
                    holds = holds && a && b;
                },
                _ => {
                    assert(!covers(self@, c@));
                    return Err(StateError::UnknownVariable);
                },
            }
        }
        Ok(holds)
    }

    /// Gives `var` the value `value`, in place of the one it may have had.
    /// Refused, with the state left as it was, when the state has no slot for
    /// `var`, or else when `value` is not in the domain of `var`.
    pub fn assign(&mut self, var: &Variable<T>, value: T) -> (r: Result<(), StateError>)
        requires
            faithful::<T>(),
        ensures
            match r {
                Ok(_) => {
                    &&& old(self)@.dom().contains(var@.id)
                    &&& var@.domain.contains(value)
                    &&& final(self)@ == old(self)@.insert(var@.id, Some(value))
                },
                Err(StateError::UnknownVariable) => {
                    &&& !old(self)@.dom().contains(var@.id)
                    &&& final(self)@ == old(self)@
                },
                Err(StateError::ValueOutOfDomain) => {
                    &&& old(self)@.dom().contains(var@.id)
                    &&& !var@.domain.contains(value)
                    &&& final(self)@ == old(self)@
                },
            },
    {
        broadcast use group_hash_axioms;

        let id = var.id();
        if !self.assignments.contains_key(&id) {
            Err(StateError::UnknownVariable)
        } else if !var.contains(&value) {
            Err(StateError::ValueOutOfDomain)
        } else {
            self.assignments.insert(id, Some(value));
            Ok(())
        }
    }

    /// Takes the value of `var` away, if it has one. Refused when the state
    /// has no slot for `var`.
    pub fn unassign(&mut self, var: &Variable<T>) -> (r: Result<(), StateError>)
        ensures
            match r {
                Ok(_) => {
                    &&& old(self)@.dom().contains(var@.id)
                    &&& final(self)@ == old(self)@.insert(var@.id, None)
                },
                Err(e) => {
                    &&& e == StateError::UnknownVariable
                    &&& !old(self)@.dom().contains(var@.id)
                    &&& final(self)@ == old(self)@
                },
            },
    {
        broadcast use group_hash_axioms;

        let id = var.id();
        if !self.assignments.contains_key(&id) {
            Err(StateError::UnknownVariable)
        } else {
            self.assignments.insert(id, None);
            Ok(())
        }
    }

    /// The value that `var` holds, if the state has a slot for it and the
    /// slot holds one.
    pub fn value_of(&self, var: &Variable<T>) -> (r: Option<&T>)
        ensures
            match r {
                Some(v) => self@.dom().contains(var@.id) && self@[var@.id] == Some(*v),
                None => !self@.dom().contains(var@.id) || self@[var@.id] is None,
            },
    {
        broadcast use group_hash_axioms;

        match self.assignments.get(&var.id()) {
            Some(Some(v)) => Some(v),
            _ => None,
        }
    }
}

} // verus!

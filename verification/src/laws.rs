//! What holds of every state and every set of constraints.

use crate::constraint::ConstraintView;
use crate::state::{complete, consistent, identities, satisfies, unassigned};
use crate::variable::{Domainable, Variable};
use vstd::prelude::*;

verus! {

/// The slot of variable `id` exists and holds nothing.
pub open spec fn without_value<T>(slots: Map<u64, Option<T>>, id: u64) -> bool {
    slots.dom().contains(id) && slots[id] is None
}

/// The slot of variable `id` exists and holds `value`.
pub open spec fn holds_value<T>(slots: Map<u64, Option<T>>, id: u64, value: T) -> bool {
    slots.dom().contains(id) && slots[id] == Some(value)
}

/// A state that was just created over some variables is complete exactly
/// when there is no variable at all.
pub proof fn lemma_fresh_state_complete_iff_no_variable<T: Domainable>(
    variables: Seq<&Variable<T>>,
)
    ensures
        complete(unassigned::<T>(identities(variables))) <==> variables.len() == 0,
{
    let slots = unassigned::<T>(identities(variables));
    if variables.len() > 0 {
        let id = variables[0]@.id;
        assert(identities(variables).contains(id));
        assert(slots.dom().contains(id) && slots[id] is None);
    }
}

/// A state in which no variable that the constraints mention has a value is
/// consistent with them, whatever they admit.
pub proof fn lemma_no_value_is_consistent<T>(
    slots: Map<u64, Option<T>>,
    cs: Set<ConstraintView<T>>,
)
    requires
        forall|c: ConstraintView<T>| #[trigger]
            cs.contains(c) ==> without_value(slots, c.var1.id) && without_value(slots, c.var2.id),
    ensures
        consistent(slots, cs),
{
}

/// A state in which the first variable of one of the constraints holds a
/// value other than the one that the constraint admits is inconsistent,
/// whatever the second variable holds.
pub proof fn lemma_wrong_first_value_is_inconsistent<T>(
    slots: Map<u64, Option<T>>,
    cs: Set<ConstraintView<T>>,
    c: ConstraintView<T>,
    value: T,
)
    requires
        cs.contains(c),
        holds_value(slots, c.var1.id, value),
        value != c.var1_value,
    ensures
        !consistent(slots, cs),
{
    assert(!satisfies(slots, c));
}

/// A state in which the second variable of one of the constraints holds a
/// value other than the one that the constraint admits is inconsistent,
/// whatever the first variable holds.
pub proof fn lemma_wrong_second_value_is_inconsistent<T>(
    slots: Map<u64, Option<T>>,
    cs: Set<ConstraintView<T>>,
    c: ConstraintView<T>,
    value: T,
)
    requires
        cs.contains(c),
        holds_value(slots, c.var2.id, value),
        value != c.var2_value,
    ensures
        !consistent(slots, cs),
{
    assert(!satisfies(slots, c));
}

/// A state in which both variables of a constraint hold the values that it
/// admits satisfies that constraint, and is consistent with a set that holds
/// it as soon as it satisfies the others.
pub proof fn lemma_admitted_pair_is_consistent<T>(
    slots: Map<u64, Option<T>>,
    cs: Set<ConstraintView<T>>,
    c: ConstraintView<T>,
)
    requires
        holds_value(slots, c.var1.id, c.var1_value),
        holds_value(slots, c.var2.id, c.var2_value),
    ensures
        satisfies(slots, c),
        (forall|d: ConstraintView<T>| cs.contains(d) && d != c ==> #[trigger] satisfies(slots, d))
            ==> consistent(slots, cs),
{
}

} // verus!

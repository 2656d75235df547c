use csp::constraint::{BinaryConstraint, Constraints};
use csp::state::{State, StateError};
use csp::variable::Variable;
use std::collections::HashSet;

#[test]
fn fresh_state_over_no_variable_is_complete() {
    let state: State<i32> = State::new(Vec::new());
    assert!(state.is_complete());
}

#[test]
fn fresh_state_over_variables_is_not_complete() {
    let var1 = Variable::new(1, HashSet::from([1, 2, 3]));
    let var2 = Variable::new(2, HashSet::from([4, 5, 6]));
    assert!(!State::new(vec![&var1]).is_complete());
    assert!(!State::new(vec![&var1, &var2]).is_complete());
}

#[test]
fn fresh_state_holds_no_value() {
    let var1 = Variable::new(1, HashSet::from([1, 2, 3]));
    let var2 = Variable::new(2, HashSet::from([4, 5, 6]));
    let state = State::new(vec![&var1, &var2]);
    assert_eq!(state.value_of(&var1), None);
    assert_eq!(state.value_of(&var2), None);
}

#[test]
fn state_without_values_is_consistent_with_anything() {
    let var1 = Variable::new(1, HashSet::from([1, 2, 3]));
    let var2 = Variable::new(2, HashSet::from([4, 5, 6]));
    let c1 = BinaryConstraint::new(&var1, 3, &var2, 4);
    let c2 = BinaryConstraint::new(&var1, 1, &var2, 6);
    let c3 = BinaryConstraint::new(&var2, 5, &var1, 2);
    let constraints = Constraints::new(vec![&c1, &c2, &c3]);
    let state = State::new(vec![&var1, &var2]);
    assert!(state.is_consistent(&constraints));
    assert_eq!(state.try_is_consistent(&constraints), Ok(true));
}

#[test]
fn no_constraint_is_never_violated() {
    let var1 = Variable::new(1, HashSet::from([1, 2, 3]));
    let mut state = State::new(vec![&var1]);
    let constraints: Constraints<i32> = Constraints::new(Vec::new());
    assert!(state.is_consistent(&constraints));
    assert_eq!(state.assign(&var1, 2), Ok(()));
    assert!(state.is_consistent(&constraints));
}

#[test]
fn wrong_first_value_is_inconsistent_whatever_the_second() {
    let var1 = Variable::new(1, HashSet::from([1, 2, 3]));
    let var2 = Variable::new(2, HashSet::from([4, 5, 6]));
    let c = BinaryConstraint::new(&var1, 3, &var2, 4);
    let constraints = Constraints::new(vec![&c]);

    let mut state = State::new(vec![&var1, &var2]);
    assert_eq!(state.assign(&var1, 1), Ok(()));
    assert!(!state.is_consistent(&constraints));
    for second in [4, 5, 6] {
        assert_eq!(state.assign(&var2, second), Ok(()));
        assert!(!state.is_consistent(&constraints));
    }
}

#[test]
fn wrong_second_value_is_inconsistent_whatever_the_first() {
    let var1 = Variable::new(1, HashSet::from([1, 2, 3]));
    let var2 = Variable::new(2, HashSet::from([4, 5, 6]));
    let c = BinaryConstraint::new(&var1, 3, &var2, 4);
    let constraints = Constraints::new(vec![&c]);

    let mut state = State::new(vec![&var1, &var2]);
    assert_eq!(state.assign(&var2, 5), Ok(()));
    assert!(!state.is_consistent(&constraints));
    for first in [1, 2, 3] {
        assert_eq!(state.assign(&var1, first), Ok(()));
        assert!(!state.is_consistent(&constraints));
    }
}

#[test]
fn admitted_pair_is_consistent() {
    let var1 = Variable::new(1, HashSet::from([1, 2, 3]));
    let var2 = Variable::new(2, HashSet::from([4, 5, 6]));
    let var3 = Variable::new(3, HashSet::from([7, 8]));
    let c = BinaryConstraint::new(&var1, 3, &var2, 4);
    let other = BinaryConstraint::new(&var2, 4, &var3, 8);

    let mut state = State::new(vec![&var1, &var2, &var3]);
    assert_eq!(state.assign(&var1, 3), Ok(()));
    assert_eq!(state.assign(&var2, 4), Ok(()));
    assert!(state.is_consistent(&Constraints::new(vec![&c])));
    assert!(state.is_consistent(&Constraints::new(vec![&c, &other])));

    assert_eq!(state.assign(&var3, 7), Ok(()));
    assert!(state.is_consistent(&Constraints::new(vec![&c])));
    assert!(!state.is_consistent(&Constraints::new(vec![&c, &other])));
}

#[test]
fn scenario_of_two_variables_and_one_constraint() {
    let var1 = Variable::new(1, HashSet::from([1, 2, 3]));
    let var2 = Variable::new(2, HashSet::from([4, 5, 6]));
    let c = BinaryConstraint::new(&var1, 3, &var2, 4);
    let constraints = Constraints::new(vec![&c]);

    let mut state = State::new(vec![&var1, &var2]);
    assert!(state.is_consistent(&constraints));
    assert!(!state.is_complete());

    assert_eq!(state.assign(&var1, 3), Ok(()));
    assert!(state.is_consistent(&constraints));
    assert!(!state.is_complete());

    assert_eq!(state.assign(&var2, 4), Ok(()));
    assert!(state.is_consistent(&constraints));
    assert!(state.is_complete());

    assert_eq!(state.assign(&var1, 2), Ok(()));
    assert!(!state.is_consistent(&constraints));
    assert!(state.is_complete());
}

#[test]
fn consistency_ignores_order_and_repetition() {
    let var1 = Variable::new(1, HashSet::from([1, 2, 3]));
    let var2 = Variable::new(2, HashSet::from([4, 5, 6]));
    let kept = BinaryConstraint::new(&var1, 3, &var2, 4);
    let broken = BinaryConstraint::new(&var1, 1, &var2, 4);

    let mut state = State::new(vec![&var1, &var2]);
    assert_eq!(state.assign(&var1, 3), Ok(()));

    assert!(state.is_consistent(&Constraints::new(vec![&kept, &kept, &kept])));
    assert!(!state.is_consistent(&Constraints::new(vec![&kept, &broken])));
    assert!(!state.is_consistent(&Constraints::new(vec![&broken, &kept])));
    assert!(!state.is_consistent(&Constraints::new(vec![&broken, &kept, &broken])));
}

#[test]
fn assign_replaces_and_unassign_clears() {
    let var1 = Variable::new(1, HashSet::from([1, 2, 3]));
    let mut state = State::new(vec![&var1]);

    assert_eq!(state.assign(&var1, 1), Ok(()));
    assert_eq!(state.value_of(&var1), Some(&1));
    assert!(state.is_complete());

    assert_eq!(state.assign(&var1, 2), Ok(()));
    assert_eq!(state.value_of(&var1), Some(&2));

    assert_eq!(state.unassign(&var1), Ok(()));
    assert_eq!(state.value_of(&var1), None);
    assert!(!state.is_complete());

    assert_eq!(state.unassign(&var1), Ok(()));
    assert_eq!(state.value_of(&var1), None);
}

#[test]
fn assign_refuses_a_value_out_of_domain() {
    let var1 = Variable::new(1, HashSet::from([1, 2, 3]));
    let mut state = State::new(vec![&var1]);
    assert_eq!(state.assign(&var1, 2), Ok(()));
    assert_eq!(state.assign(&var1, 4), Err(StateError::ValueOutOfDomain));
    assert_eq!(state.value_of(&var1), Some(&2));
}

#[test]
fn assign_and_unassign_refuse_an_unknown_variable() {
    let var1 = Variable::new(1, HashSet::from([1, 2, 3]));
    let stranger = Variable::new(9, HashSet::from([1, 2, 3]));
    let mut state = State::new(vec![&var1]);
    assert_eq!(state.assign(&stranger, 1), Err(StateError::UnknownVariable));
    assert_eq!(state.assign(&stranger, 7), Err(StateError::UnknownVariable));
    assert_eq!(state.unassign(&stranger), Err(StateError::UnknownVariable));
    assert_eq!(state.value_of(&stranger), None);
    assert_eq!(state.value_of(&var1), None);
    assert!(!state.is_complete());
}

#[test]
fn try_is_consistent_reports_an_unknown_variable() {
    let var1 = Variable::new(1, HashSet::from([1, 2, 3]));
    let var2 = Variable::new(2, HashSet::from([4, 5, 6]));
    let stranger = Variable::new(9, HashSet::from([0]));
    let inside = BinaryConstraint::new(&var1, 3, &var2, 4);
    let first_outside = BinaryConstraint::new(&stranger, 0, &var2, 4);
    let second_outside = BinaryConstraint::new(&var1, 3, &stranger, 0);

    let mut state = State::new(vec![&var1, &var2]);
    assert_eq!(
        state.try_is_consistent(&Constraints::new(vec![&inside, &first_outside])),
        Err(StateError::UnknownVariable)
    );
    assert_eq!(
        state.try_is_consistent(&Constraints::new(vec![&second_outside])),
        Err(StateError::UnknownVariable)
    );

    assert_eq!(state.assign(&var1, 1), Ok(()));
    assert_eq!(state.try_is_consistent(&Constraints::new(vec![&inside])), Ok(false));
    assert_eq!(
        state.try_is_consistent(&Constraints::new(vec![&inside, &first_outside])),
        Err(StateError::UnknownVariable)
    );
}

#[test]
fn variables_are_told_apart_by_identity_not_by_domain() {
    let var1 = Variable::new(1, HashSet::from([1, 2, 3]));
    let twin = Variable::new(2, HashSet::from([1, 2, 3]));
    let mut state = State::new(vec![&var1, &twin]);
    assert_eq!(state.assign(&var1, 2), Ok(()));
    assert_eq!(state.value_of(&var1), Some(&2));
    assert_eq!(state.value_of(&twin), None);
    assert!(!state.is_complete());
}

#[test]
fn a_variable_listed_twice_has_one_slot() {
    let var1 = Variable::new(1, HashSet::from([1, 2, 3]));
    let mut state = State::new(vec![&var1, &var1]);
    assert!(!state.is_complete());
    assert_eq!(state.assign(&var1, 1), Ok(()));
    assert!(state.is_complete());
}

//! Data model of a constraint satisfaction problem: variables with finite
//! domains, binary constraints naming one admissible pair of values, and a
//! partial assignment with its consistency and completeness predicates.

pub mod constraint;
pub mod laws;
pub mod state;
pub mod variable;

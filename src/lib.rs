//! Arithmetization core of a PLONKish proof system: columns and the order
//! among them, polynomial expressions over column queries, the collection of
//! distinct queries into dense tables, the constraint system with its degree
//! and blinding accounting, and the permutation argument that ties cells
//! together by copy constraints.

pub mod sealed;
pub mod column;
pub mod expression;
pub mod queries;
pub mod lookup;
pub mod shuffle;
pub mod permutation;
pub mod gate;
pub mod constraint_system;

//! A small PLONKish constraint system over the Pallas base field: gates as
//! expression trees, a single-region witness builder, a satisfiability
//! checker, and a chip for the recurrence `d = a*b + b*c`.
pub mod checker;
pub mod circuit;
pub mod expr;
pub mod fibonacci;
pub mod field;
pub mod graph;

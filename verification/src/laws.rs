//! What a program may rely on, stated of the members and operations themselves:
//! how the result of a call follows from its operands, and how two calls relate.
pub mod answers;
pub mod arithmetic;
pub mod blocks;
pub mod changes;
pub mod collections;
pub mod editors;
pub mod exceptions;
pub mod faults;
pub mod formats;
pub mod joining;
pub mod lambdas;
pub mod laziness;
pub mod likeness;
pub mod literals;
pub mod names;
pub mod operations;
pub mod orders;
pub mod printing;
pub mod ranges;
pub mod sources;
pub mod texts;
pub mod throwables;

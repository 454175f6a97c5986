//! A verified evaluator for Reverse Polish Notation arithmetic expressions.
//!
//! The evaluator walks the input text once, left to right, keeping a stack of
//! operands.  A run of decimal digits pushes a literal; any other non-space
//! character pops two operands and, when it is one of the five recognized
//! operator symbols, pushes their combination.  When the scan ends with exactly
//! one operand on the stack, that operand is the result; otherwise the
//! expression is malformed.
//!
//! Numeric evaluation is deliberately left to the caller: the library returns
//! the surviving operand as a tree of literals and operator applications, so
//! that the scanning and stack discipline are verified while the caller picks
//! the numeric domain (typically IEEE-754 doubles, which verified code cannot
//! hold).

pub mod chars;
pub mod error;
pub mod laws;
pub mod operand;
pub mod rpn;
pub mod token;

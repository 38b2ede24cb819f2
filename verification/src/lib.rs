//! The dynamic semantics of a small imperative language: an evaluator of
//! expressions and an executor of statements over a chain of scopes.
//!
//! [`ir`] holds the abstract syntax and the environment. [`interpreter`]
//! holds the evaluator and the executor. They run as an abstract machine,
//! one step at a time. The machine computes on integers, booleans and
//! strings itself; arithmetic on reals, files and standard output are the
//! business of its caller, whom it asks and who resumes it with the
//! answer. A program that loops forever keeps its caller stepping forever
//! and a program that recurses deeply grows the machine's stack, not the
//! caller's.
pub mod ir;
pub mod interpreter;

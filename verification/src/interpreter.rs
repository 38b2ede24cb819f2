//! Evaluation of expressions and execution of statements.
//!
//! - [`semantics`] defines the language as an abstract machine over
//!   mathematical values: what one step does, and what a run is.
//! - [`interpreter`] holds the values of the language and the rules of the
//!   evaluator and the executor, each proved to do what the semantics
//!   says.
//! - [`machine`] holds the machine itself: its states, its steps and the
//!   requests it makes of the outside world.
//! - [`numeric`] and [`render`] hold integer arithmetic and the text of
//!   printed values; [`error`] holds the errors.
//! - [`laws`], [`framing`] and [`reduction`] state and prove what holds of
//!   every run.
pub mod error;
pub mod framing;
pub mod interpreter;
pub mod laws;
pub mod machine;
pub mod numeric;
pub mod reduction;
pub mod render;
pub mod semantics;

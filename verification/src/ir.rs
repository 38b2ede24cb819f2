//! Intermediate representation: syntax trees and environments.
pub mod ast;
pub mod environment;

//! Type checking of the functions on sequences of the Clarity language, and of those that convert
//! values to and from their serialized form.
//!
//! `sequences` and `conversions` hold the checks. Each runs against a `TypeChecker`, which asks an
//! `Analysis` for all that the rest of a contract decides, and keeps a record of what came back.
//! `rules` says, for any answers, what a check asks and what it comes to. `outcomes` and `mapping`
//! tell that from the questions and answers themselves. `laws`, `typing`, `applying`, `charging`
//! and `determinism` say what follows.

pub mod analysis;
pub mod applying;
pub mod arguments;
pub mod charging;
pub mod checker;
pub mod conversions;
pub mod determinism;
pub mod endings;
pub mod errors;
pub mod kept;
pub mod laws;
pub mod mapping;
pub mod outcomes;
pub mod record;
pub mod representations;
pub mod rules;
pub mod run;
pub mod sequences;
pub mod signatures;
pub mod typing;

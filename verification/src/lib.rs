//! Compile-time preprocessing of data records.
//!
//! The crate models a declarative record description (a struct or an enum
//! whose fields carry processing directives), resolves each field's chain of
//! directives into a progressively transformed output type, and synthesizes
//! the text of a sibling "processed" record together with a transformation
//! routine.  A small evaluator gives the runtime semantics of that routine:
//! directives are applied in declared order, the record-level chain first,
//! failing fast and tagging each failure with the offending field's name.
//!
//! The runtime validators and mutators that generated code calls (email,
//! length, range, trim, and the rest) live here as well, each with a precise
//! contract.

use vstd::prelude::*;

pub mod ast;
pub mod builder;
pub mod catalog;
pub mod directive;
pub mod eval;
pub mod laws;
pub mod preprocessors;
pub mod process;
pub mod resolve;
pub mod synth;
pub mod text;
pub mod utils;
pub mod validate;
pub mod validators;

pub use utils::Error;

verus! {

/// The crate-wide result alias used by validators and preprocessors.
pub type PreResult<T> = Result<T, crate::utils::Error>;

} // verus!

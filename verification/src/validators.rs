//! Validators check a field's value without changing it; each returns the
//! value unchanged on success and an [`Error`](crate::utils::Error) on
//! failure.  These are the functions the synthesized transformation routine
//! calls at run time.

pub mod contains;
pub mod does_not_contain;
pub mod domain;
pub mod email;
pub mod empty;
pub mod ip;
pub mod length;
pub mod range;
pub mod regex;
pub mod url;
